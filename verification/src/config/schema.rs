//! The configuration schema: the mathematical view of each configuration
//! type, and the decoding of a parsed TOML document into a [`Config`].
//!
//! Every key has a default, so missing keys and missing tables are filled
//! in; a key that the schema does not know, or a value of the wrong type or
//! out of range, rejects the whole document.

use vstd::prelude::*;
use super::defaults::{self, spec_base_url, spec_deny_prefixes, spec_high_risk_patterns};
use super::document::{
    bool_error, bool_or, bool_value, first_failure, int_error, int_or, int_value, key_is,
    key_message, key_msg, lemma_first_failure_at, lemma_first_failure_clean,
    lemma_first_failure_next, lemma_first_failure_prefix, lemma_take_next, lemma_value_of_next, opt_str_of, str_error, str_list_error,
    str_list_or, str_list_value, str_or, str_value, table_of, table_value, value_of, TomlValue,
};
use super::{
    AuditConfig, Config, HookEntry, HooksConfig, LimitsConfig, LlmConfig, LlmInvocationConfig,
    LlmProvider, SafetyConfig, SafetyMode,
};
use crate::text::string_views;

verus! {

/// The mathematical content of an [`LlmConfig`].
pub struct LlmView {
    pub enabled: bool,
    pub provider: LlmProvider,
    pub base_url: Seq<char>,
    pub model: Option<Seq<char>>,
    pub timeout_secs: u64,
    pub allow_remote: bool,
    pub invocation: LlmInvocationConfig,
}

/// The mathematical content of a [`SafetyConfig`].
pub struct SafetyView {
    pub deny_prefixes: Seq<Seq<char>>,
    pub allow_prefixes: Seq<Seq<char>>,
    pub high_risk_patterns: Seq<Seq<char>>,
}

/// The mathematical content of an [`AuditConfig`].
pub struct AuditView {
    pub enabled: bool,
    pub path: Option<Seq<char>>,
}

/// The mathematical content of a [`HookEntry`].
pub struct HookView {
    pub command: Seq<Seq<char>>,
    pub timeout_ms: u64,
}

/// The mathematical content of a [`Config`].
pub struct ConfigView {
    pub schema_version: u32,
    pub safety_mode: SafetyMode,
    pub llm: LlmView,
    pub safety: SafetyView,
    pub audit: AuditView,
    pub hooks: Seq<HookView>,
    pub limits: LimitsConfig,
}

/// The characters of an optional string.
pub open spec fn opt_view(o: Option<String>) -> Option<Seq<char>> {
    match o {
        Some(s) => Some(s@),
        None => None,
    }
}

impl View for LlmConfig {
    type V = LlmView;

    open spec fn view(&self) -> LlmView {
        LlmView {
            enabled: self.enabled,
            provider: self.provider,
            base_url: self.base_url@,
            model: opt_view(self.model),
            timeout_secs: self.timeout_secs,
            allow_remote: self.allow_remote,
            invocation: self.invocation,
        }
    }
}

impl View for SafetyConfig {
    type V = SafetyView;

    open spec fn view(&self) -> SafetyView {
        SafetyView {
            deny_prefixes: string_views(self.deny_prefixes@),
            allow_prefixes: string_views(self.allow_prefixes@),
            high_risk_patterns: string_views(self.high_risk_patterns@),
        }
    }
}

impl View for AuditConfig {
    type V = AuditView;

    open spec fn view(&self) -> AuditView {
        AuditView { enabled: self.enabled, path: opt_view(self.path) }
    }
}

impl View for HookEntry {
    type V = HookView;

    open spec fn view(&self) -> HookView {
        HookView { command: string_views(self.command@), timeout_ms: self.timeout_ms }
    }
}

/// The views of a sequence of hooks.
pub open spec fn hook_views(hooks: Seq<HookEntry>) -> Seq<HookView> {
    hooks.map_values(|h: HookEntry| h@)
}

impl View for Config {
    type V = ConfigView;

    open spec fn view(&self) -> ConfigView {
        ConfigView {
            schema_version: self.schema_version,
            safety_mode: self.safety_mode,
            llm: self.llm@,
            safety: self.safety@,
            audit: self.audit@,
            hooks: hook_views(self.hooks.pre_exec@),
            limits: self.limits,
        }
    }
}

// ── the schema ──────────────────────────────────────────────────────────────

/// Keys of the root table.
pub open spec fn root_keys() -> Seq<Seq<char>> {
    seq![
        "schema_version"@,
        "safety_mode"@,
        "llm"@,
        "safety"@,
        "audit"@,
        "hooks"@,
        "limits"@,
    ]
}

/// Keys of `[llm]`.
pub open spec fn llm_keys() -> Seq<Seq<char>> {
    seq![
        "enabled"@,
        "provider"@,
        "base_url"@,
        "model"@,
        "timeout_secs"@,
        "allow_remote"@,
        "invocation"@,
    ]
}

/// Keys of `[safety]`.
pub open spec fn safety_keys() -> Seq<Seq<char>> {
    seq!["deny_prefixes"@, "allow_prefixes"@, "high_risk_patterns"@]
}

/// Keys of `[audit]`.
pub open spec fn audit_keys() -> Seq<Seq<char>> {
    seq!["enabled"@, "path"@]
}

/// Keys of `[hooks]`.
pub open spec fn hooks_keys() -> Seq<Seq<char>> {
    seq!["pre_exec"@]
}

/// Keys of `[limits]`.
pub open spec fn limits_keys() -> Seq<Seq<char>> {
    seq!["max_stdout_capture_bytes"@, "max_llm_payload_bytes"@]
}

// Every table is read entry by entry, in document order. The first entry
// whose key the table does not take, or whose value has the wrong type or
// range, rejects the whole document with a message naming the key; keys
// that are absent take their defaults.

/// The complaint about a `safety_mode` value.
pub open spec fn mode_error(v: TomlValue) -> Option<Seq<char>> {
    match v {
        TomlValue::Str(s) => if s@ == "strict"@ || s@ == "balanced"@ || s@ == "loose"@ {
            None
        } else {
            Some(key_msg("expected strict, balanced or loose for key"@, "safety_mode"@))
        },
        _ => Some(key_msg("expected a string for key"@, "safety_mode"@)),
    }
}

/// The mode a `safety_mode` value names.
pub open spec fn mode_from(v: TomlValue) -> SafetyMode {
    match v {
        TomlValue::Str(s) => if s@ == "strict"@ {
            SafetyMode::Strict
        } else if s@ == "loose"@ {
            SafetyMode::Loose
        } else {
            SafetyMode::Balanced
        },
        _ => SafetyMode::Balanced,
    }
}

/// `safety_mode`: balanced when absent.
pub open spec fn mode_of(t: Seq<(String, TomlValue)>) -> SafetyMode {
    match value_of(t, "safety_mode"@) {
        Some(v) => mode_from(v),
        None => SafetyMode::Balanced,
    }
}

/// The complaint about a `provider` value: only `ollama` is known.
pub open spec fn provider_error(v: TomlValue) -> Option<Seq<char>> {
    match v {
        TomlValue::Str(s) => if s@ == "ollama"@ {
            None
        } else {
            Some(key_msg("expected ollama for key"@, "provider"@))
        },
        _ => Some(key_msg("expected a string for key"@, "provider"@)),
    }
}

/// The complaint about a sub-table value of `key`, whose entries `f` checks.
pub open spec fn table_error(
    key: Seq<char>,
    v: TomlValue,
    f: spec_fn(Seq<(String, TomlValue)>) -> Option<Seq<char>>,
) -> Option<Seq<char>> {
    match v {
        TomlValue::Table(e) => f(e@),
        _ => Some(key_msg("expected a table for key"@, key)),
    }
}

/// The message for a key that a table does not take.
pub open spec fn unknown_msg(key: Seq<char>) -> Seq<char> {
    key_msg("unknown key"@, key)
}

/// One entry of `[llm.invocation]`.
pub open spec fn invocation_entry(k: Seq<char>, v: TomlValue) -> Option<Seq<char>> {
    if k == "nl_session"@ || k == "assist_on_not_found"@ {
        bool_error(k, v)
    } else if k == "max_context_chars"@ {
        int_error(k, v, u64::MAX as int)
    } else {
        Some(unknown_msg(k))
    }
}

/// The entry check of `[llm.invocation]`.
pub open spec fn invocation_check() -> spec_fn(Seq<char>, TomlValue) -> Option<Seq<char>> {
    |k: Seq<char>, v: TomlValue| invocation_entry(k, v)
}

/// The values of `[llm.invocation]`.
pub open spec fn invocation_view(t: Seq<(String, TomlValue)>) -> LlmInvocationConfig {
    LlmInvocationConfig {
        nl_session: bool_or(t, "nl_session"@, false),
        assist_on_not_found: bool_or(t, "assist_on_not_found"@, false),
        max_context_chars: int_or(t, "max_context_chars"@, 8_000) as u64,
    }
}

/// The decoding of `[llm.invocation]`.
pub open spec fn decoded_invocation(t: Seq<(String, TomlValue)>) -> Result<LlmInvocationConfig, Seq<char>> {
    match first_failure(t, invocation_check()) {
        Some(m) => Err(m),
        None => Ok(invocation_view(t)),
    }
}

/// One entry of `[llm]`.
pub open spec fn llm_entry(k: Seq<char>, v: TomlValue) -> Option<Seq<char>> {
    if k == "enabled"@ || k == "allow_remote"@ {
        bool_error(k, v)
    } else if k == "provider"@ {
        provider_error(v)
    } else if k == "base_url"@ || k == "model"@ {
        str_error(k, v)
    } else if k == "timeout_secs"@ {
        int_error(k, v, u64::MAX as int)
    } else if k == "invocation"@ {
        table_error(k, v, |e: Seq<(String, TomlValue)>| first_failure(e, invocation_check()))
    } else {
        Some(unknown_msg(k))
    }
}

/// The entry check of `[llm]`.
pub open spec fn llm_check() -> spec_fn(Seq<char>, TomlValue) -> Option<Seq<char>> {
    |k: Seq<char>, v: TomlValue| llm_entry(k, v)
}

/// The values of `[llm]`.
pub open spec fn llm_view(t: Seq<(String, TomlValue)>) -> LlmView {
    LlmView {
        enabled: bool_or(t, "enabled"@, false),
        provider: LlmProvider::Ollama,
        base_url: str_or(t, "base_url"@, spec_base_url()),
        model: opt_str_of(t, "model"@),
        timeout_secs: int_or(t, "timeout_secs"@, 60) as u64,
        allow_remote: bool_or(t, "allow_remote"@, false),
        invocation: invocation_view(table_of(t, "invocation"@)),
    }
}

/// The decoding of `[llm]`.
pub open spec fn decoded_llm(t: Seq<(String, TomlValue)>) -> Result<LlmView, Seq<char>> {
    match first_failure(t, llm_check()) {
        Some(m) => Err(m),
        None => Ok(llm_view(t)),
    }
}

/// One entry of `[safety]`.
pub open spec fn safety_entry(k: Seq<char>, v: TomlValue) -> Option<Seq<char>> {
    if k == "deny_prefixes"@ || k == "allow_prefixes"@ || k == "high_risk_patterns"@ {
        str_list_error(k, v)
    } else {
        Some(unknown_msg(k))
    }
}

/// The entry check of `[safety]`.
pub open spec fn safety_check() -> spec_fn(Seq<char>, TomlValue) -> Option<Seq<char>> {
    |k: Seq<char>, v: TomlValue| safety_entry(k, v)
}

/// The values of `[safety]`.
pub open spec fn safety_view(t: Seq<(String, TomlValue)>) -> SafetyView {
    SafetyView {
        deny_prefixes: str_list_or(t, "deny_prefixes"@, spec_deny_prefixes()),
        allow_prefixes: str_list_or(t, "allow_prefixes"@, seq![]),
        high_risk_patterns: str_list_or(t, "high_risk_patterns"@, spec_high_risk_patterns()),
    }
}

/// The decoding of `[safety]`.
pub open spec fn decoded_safety(t: Seq<(String, TomlValue)>) -> Result<SafetyView, Seq<char>> {
    match first_failure(t, safety_check()) {
        Some(m) => Err(m),
        None => Ok(safety_view(t)),
    }
}

/// One entry of `[audit]`.
pub open spec fn audit_entry(k: Seq<char>, v: TomlValue) -> Option<Seq<char>> {
    if k == "enabled"@ {
        bool_error(k, v)
    } else if k == "path"@ {
        str_error(k, v)
    } else {
        Some(unknown_msg(k))
    }
}

/// The entry check of `[audit]`.
pub open spec fn audit_check() -> spec_fn(Seq<char>, TomlValue) -> Option<Seq<char>> {
    |k: Seq<char>, v: TomlValue| audit_entry(k, v)
}

/// The values of `[audit]`.
pub open spec fn audit_view(t: Seq<(String, TomlValue)>) -> AuditView {
    AuditView { enabled: bool_or(t, "enabled"@, true), path: opt_str_of(t, "path"@) }
}

/// The decoding of `[audit]`.
pub open spec fn decoded_audit(t: Seq<(String, TomlValue)>) -> Result<AuditView, Seq<char>> {
    match first_failure(t, audit_check()) {
        Some(m) => Err(m),
        None => Ok(audit_view(t)),
    }
}

/// One entry of a `[[hooks.pre_exec]]` table.
pub open spec fn hook_entry(k: Seq<char>, v: TomlValue) -> Option<Seq<char>> {
    if k == "command"@ {
        str_list_error(k, v)
    } else if k == "timeout_ms"@ {
        int_error(k, v, u64::MAX as int)
    } else {
        Some(unknown_msg(k))
    }
}

/// The entry check of a hook table.
pub open spec fn hook_check() -> spec_fn(Seq<char>, TomlValue) -> Option<Seq<char>> {
    |k: Seq<char>, v: TomlValue| hook_entry(k, v)
}

/// The complaint about a hook table: a failing entry, else a missing
/// `command`, which is required.
pub open spec fn hook_error(t: Seq<(String, TomlValue)>) -> Option<Seq<char>> {
    match first_failure(t, hook_check()) {
        Some(m) => Some(m),
        None => if value_of(t, "command"@) is None {
            Some(key_msg("missing key"@, "command"@))
        } else {
            None
        },
    }
}

/// The values of a hook table.
pub open spec fn hook_view(t: Seq<(String, TomlValue)>) -> HookView {
    HookView {
        command: str_list_or(t, "command"@, seq![]),
        timeout_ms: int_or(t, "timeout_ms"@, 5_000) as u64,
    }
}

/// The decoding of one `[[hooks.pre_exec]]` table.
pub open spec fn decoded_hook(t: Seq<(String, TomlValue)>) -> Result<HookView, Seq<char>> {
    match hook_error(t) {
        Some(m) => Err(m),
        None => Ok(hook_view(t)),
    }
}

/// The complaint about one item of the `pre_exec` array.
pub open spec fn hook_item_error(v: TomlValue) -> Option<Seq<char>> {
    match v {
        TomlValue::Table(e) => hook_error(e@),
        _ => Some(key_msg("expected a table for key"@, "pre_exec"@)),
    }
}

/// The hook of one item of the `pre_exec` array.
pub open spec fn hook_item_view(v: TomlValue) -> HookView {
    match v {
        TomlValue::Table(e) => hook_view(e@),
        _ => hook_view(seq![]),
    }
}

/// The complaint about the first item of the `pre_exec` array, in order,
/// that is not a valid hook table.
pub open spec fn hook_items_error(items: Seq<TomlValue>) -> Option<Seq<char>>
    decreases items.len(),
{
    if items.len() == 0 {
        None
    } else {
        match hook_items_error(items.drop_last()) {
            Some(m) => Some(m),
            None => hook_item_error(items.last()),
        }
    }
}

/// The hooks of the `pre_exec` array.
pub open spec fn hook_items_view(items: Seq<TomlValue>) -> Seq<HookView> {
    items.map_values(|v: TomlValue| hook_item_view(v))
}

/// The decoding of the `pre_exec` array.
pub open spec fn decoded_hook_items(items: Seq<TomlValue>) -> Result<Seq<HookView>, Seq<char>> {
    match hook_items_error(items) {
        Some(m) => Err(m),
        None => Ok(hook_items_view(items)),
    }
}

/// One entry of `[hooks]`.
pub open spec fn hooks_entry(k: Seq<char>, v: TomlValue) -> Option<Seq<char>> {
    if k == "pre_exec"@ {
        match v {
            TomlValue::Array(a) => hook_items_error(a@),
            _ => Some(key_msg("expected an array of tables for key"@, "pre_exec"@)),
        }
    } else {
        Some(unknown_msg(k))
    }
}

/// The entry check of `[hooks]`.
pub open spec fn hooks_check() -> spec_fn(Seq<char>, TomlValue) -> Option<Seq<char>> {
    |k: Seq<char>, v: TomlValue| hooks_entry(k, v)
}

/// The hooks of `[hooks]`.
pub open spec fn hooks_view(t: Seq<(String, TomlValue)>) -> Seq<HookView> {
    match value_of(t, "pre_exec"@) {
        Some(TomlValue::Array(a)) => hook_items_view(a@),
        _ => seq![],
    }
}

/// The decoding of `[hooks]`.
pub open spec fn decoded_hooks(t: Seq<(String, TomlValue)>) -> Result<Seq<HookView>, Seq<char>> {
    match first_failure(t, hooks_check()) {
        Some(m) => Err(m),
        None => Ok(hooks_view(t)),
    }
}

/// One entry of `[limits]`.
pub open spec fn limits_entry(k: Seq<char>, v: TomlValue) -> Option<Seq<char>> {
    if k == "max_stdout_capture_bytes"@ || k == "max_llm_payload_bytes"@ {
        int_error(k, v, u64::MAX as int)
    } else {
        Some(unknown_msg(k))
    }
}

/// The entry check of `[limits]`.
pub open spec fn limits_check() -> spec_fn(Seq<char>, TomlValue) -> Option<Seq<char>> {
    |k: Seq<char>, v: TomlValue| limits_entry(k, v)
}

/// The values of `[limits]`.
pub open spec fn limits_view(t: Seq<(String, TomlValue)>) -> LimitsConfig {
    LimitsConfig {
        max_stdout_capture_bytes: int_or(t, "max_stdout_capture_bytes"@, 1_048_576) as u64,
        max_llm_payload_bytes: int_or(t, "max_llm_payload_bytes"@, 256_000) as u64,
    }
}

/// The decoding of `[limits]`.
pub open spec fn decoded_limits(t: Seq<(String, TomlValue)>) -> Result<LimitsConfig, Seq<char>> {
    match first_failure(t, limits_check()) {
        Some(m) => Err(m),
        None => Ok(limits_view(t)),
    }
}

/// One entry of the root table.
pub open spec fn root_entry(k: Seq<char>, v: TomlValue) -> Option<Seq<char>> {
    if k == "schema_version"@ {
        int_error(k, v, u32::MAX as int)
    } else if k == "safety_mode"@ {
        mode_error(v)
    } else if k == "llm"@ {
        table_error(k, v, |e: Seq<(String, TomlValue)>| first_failure(e, llm_check()))
    } else if k == "safety"@ {
        table_error(k, v, |e: Seq<(String, TomlValue)>| first_failure(e, safety_check()))
    } else if k == "audit"@ {
        table_error(k, v, |e: Seq<(String, TomlValue)>| first_failure(e, audit_check()))
    } else if k == "hooks"@ {
        table_error(k, v, |e: Seq<(String, TomlValue)>| first_failure(e, hooks_check()))
    } else if k == "limits"@ {
        table_error(k, v, |e: Seq<(String, TomlValue)>| first_failure(e, limits_check()))
    } else {
        Some(unknown_msg(k))
    }
}

/// The entry check of the root table.
pub open spec fn root_check() -> spec_fn(Seq<char>, TomlValue) -> Option<Seq<char>> {
    |k: Seq<char>, v: TomlValue| root_entry(k, v)
}

/// The configuration a root table describes, defaults filled in.
pub open spec fn config_view(root: Seq<(String, TomlValue)>) -> ConfigView {
    ConfigView {
        schema_version: int_or(root, "schema_version"@, 1) as u32,
        safety_mode: mode_of(root),
        llm: llm_view(table_of(root, "llm"@)),
        safety: safety_view(table_of(root, "safety"@)),
        audit: audit_view(table_of(root, "audit"@)),
        hooks: hooks_view(table_of(root, "hooks"@)),
        limits: limits_view(table_of(root, "limits"@)),
    }
}

/// The decoding of a whole document's root table: the configuration it
/// describes, or the message for its first failing entry in document order.
pub open spec fn decoded_config(root: Seq<(String, TomlValue)>) -> Result<ConfigView, Seq<char>> {
    match first_failure(root, root_check()) {
        Some(m) => Err(m),
        None => Ok(config_view(root)),
    }
}

/// The view of the built-in default configuration.
pub open spec fn default_view() -> ConfigView {
    ConfigView {
        schema_version: 1,
        safety_mode: SafetyMode::Balanced,
        llm: LlmView {
            enabled: false,
            provider: LlmProvider::Ollama,
            base_url: spec_base_url(),
            model: None,
            timeout_secs: 60,
            allow_remote: false,
            invocation: LlmInvocationConfig {
                nl_session: false,
                assist_on_not_found: false,
                max_context_chars: 8_000,
            },
        },
        safety: SafetyView {
            deny_prefixes: spec_deny_prefixes(),
            allow_prefixes: seq![],
            high_risk_patterns: spec_high_risk_patterns(),
        },
        audit: AuditView { enabled: true, path: None },
        hooks: seq![],
        limits: LimitsConfig { max_stdout_capture_bytes: 1_048_576, max_llm_payload_bytes: 256_000 },
    }
}

/// The keys of the invocation table are distinct.
proof fn lemma_invocation_keys_distinct()
    ensures
        "nl_session"@ != "assist_on_not_found"@,
        "nl_session"@ != "max_context_chars"@,
        "assist_on_not_found"@ != "max_context_chars"@,
{
    reveal_strlit("nl_session");
    reveal_strlit("assist_on_not_found");
    reveal_strlit("max_context_chars");
    assert("nl_session"@.len() == 10);
    assert("assist_on_not_found"@.len() == 19);
    assert("max_context_chars"@.len() == 17);
}

/// The keys of the llm table are distinct.
proof fn lemma_llm_keys_distinct()
    ensures
        "enabled"@ != "provider"@,
        "enabled"@ != "base_url"@,
        "enabled"@ != "model"@,
        "enabled"@ != "timeout_secs"@,
        "enabled"@ != "allow_remote"@,
        "enabled"@ != "invocation"@,
        "provider"@ != "base_url"@,
        "provider"@ != "model"@,
        "provider"@ != "timeout_secs"@,
        "provider"@ != "allow_remote"@,
        "provider"@ != "invocation"@,
        "base_url"@ != "model"@,
        "base_url"@ != "timeout_secs"@,
        "base_url"@ != "allow_remote"@,
        "base_url"@ != "invocation"@,
        "model"@ != "timeout_secs"@,
        "model"@ != "allow_remote"@,
        "model"@ != "invocation"@,
        "timeout_secs"@ != "allow_remote"@,
        "timeout_secs"@ != "invocation"@,
        "allow_remote"@ != "invocation"@,
{
    reveal_strlit("enabled");
    reveal_strlit("provider");
    reveal_strlit("base_url");
    reveal_strlit("model");
    reveal_strlit("timeout_secs");
    reveal_strlit("allow_remote");
    reveal_strlit("invocation");
    assert("enabled"@.len() == 7);
    assert("provider"@.len() == 8);
    assert("base_url"@.len() == 8);
    assert("model"@.len() == 5);
    assert("timeout_secs"@.len() == 12);
    assert("allow_remote"@.len() == 12);
    assert("invocation"@.len() == 10);
    assert("provider"@[0] != "base_url"@[0]);
    assert("timeout_secs"@[0] != "allow_remote"@[0]);
}

/// The keys of the safety table are distinct.
proof fn lemma_safety_keys_distinct()
    ensures
        "deny_prefixes"@ != "allow_prefixes"@,
        "deny_prefixes"@ != "high_risk_patterns"@,
        "allow_prefixes"@ != "high_risk_patterns"@,
{
    reveal_strlit("deny_prefixes");
    reveal_strlit("allow_prefixes");
    reveal_strlit("high_risk_patterns");
    assert("deny_prefixes"@.len() == 13);
    assert("allow_prefixes"@.len() == 14);
    assert("high_risk_patterns"@.len() == 18);
}

/// The keys of the audit table are distinct.
proof fn lemma_audit_keys_distinct()
    ensures
        "enabled"@ != "path"@,
{
    reveal_strlit("enabled");
    reveal_strlit("path");
    assert("enabled"@.len() == 7);
    assert("path"@.len() == 4);
}

/// The keys of the hook table are distinct.
proof fn lemma_hook_keys_distinct()
    ensures
        "command"@ != "timeout_ms"@,
{
    reveal_strlit("command");
    reveal_strlit("timeout_ms");
    assert("command"@.len() == 7);
    assert("timeout_ms"@.len() == 10);
}

/// The keys of the limits table are distinct.
proof fn lemma_limits_keys_distinct()
    ensures
        "max_stdout_capture_bytes"@ != "max_llm_payload_bytes"@,
{
    reveal_strlit("max_stdout_capture_bytes");
    reveal_strlit("max_llm_payload_bytes");
    assert("max_stdout_capture_bytes"@.len() == 24);
    assert("max_llm_payload_bytes"@.len() == 21);
}

/// The three mode names are distinct.
proof fn lemma_mode_names_distinct()
    ensures
        "strict"@ != "balanced"@,
        "strict"@ != "loose"@,
        "balanced"@ != "loose"@,
{
    reveal_strlit("strict");
    reveal_strlit("balanced");
    reveal_strlit("loose");
    assert("strict"@.len() == 6);
    assert("balanced"@.len() == 8);
    assert("loose"@.len() == 5);
}

/// The keys of the root table are distinct.
proof fn lemma_root_keys_distinct()
    ensures
        "schema_version"@ != "safety_mode"@,
        "schema_version"@ != "llm"@,
        "schema_version"@ != "safety"@,
        "schema_version"@ != "audit"@,
        "schema_version"@ != "hooks"@,
        "schema_version"@ != "limits"@,
        "safety_mode"@ != "llm"@,
        "safety_mode"@ != "safety"@,
        "safety_mode"@ != "audit"@,
        "safety_mode"@ != "hooks"@,
        "safety_mode"@ != "limits"@,
        "llm"@ != "safety"@,
        "llm"@ != "audit"@,
        "llm"@ != "hooks"@,
        "llm"@ != "limits"@,
        "safety"@ != "audit"@,
        "safety"@ != "hooks"@,
        "safety"@ != "limits"@,
        "audit"@ != "hooks"@,
        "audit"@ != "limits"@,
        "hooks"@ != "limits"@,
{
    reveal_strlit("schema_version");
    reveal_strlit("safety_mode");
    reveal_strlit("llm");
    reveal_strlit("safety");
    reveal_strlit("audit");
    reveal_strlit("hooks");
    reveal_strlit("limits");
    assert("schema_version"@.len() == 14);
    assert("safety_mode"@.len() == 11);
    assert("llm"@.len() == 3);
    assert("safety"@.len() == 6);
    assert("audit"@.len() == 5);
    assert("hooks"@.len() == 5);
    assert("limits"@.len() == 6);
    assert("safety"@[0] != "limits"@[0]);
    assert("audit"@[0] != "hooks"@[0]);
}

// ── decoding ────────────────────────────────────────────────────────────────

/// The message for a key that a table does not take.
fn unknown_key_message(k: &String) -> (s: String)
    ensures
        s@ == unknown_msg(k@),
{
    key_message("unknown key", k.as_str())
}

/// Decodes `[llm.invocation]` (see [`decoded_invocation`]).
fn decode_invocation(t: &Vec<(String, TomlValue)>) -> (r: Result<LlmInvocationConfig, String>)
    ensures
        r matches Ok(c) ==> (decoded_invocation(t@) matches Ok(w) && w == c),
        r matches Err(e) ==> (decoded_invocation(t@) matches Err(w) && w == e@),
{
    let mut nl_session = false;
    let mut assist_on_not_found = false;
    let mut max_context_chars: u64 = 8_000;
    let mut i: usize = 0;
    while i < t.len()
        invariant
            i <= t@.len(),
            first_failure(t@.take(i as int), invocation_check()) is None,
            nl_session == bool_or(t@.take(i as int), "nl_session"@, false),
            assist_on_not_found == bool_or(t@.take(i as int), "assist_on_not_found"@, false),
            max_context_chars == int_or(t@.take(i as int), "max_context_chars"@, 8_000),
        decreases t.len() - i,
    {
        proof {
            lemma_take_next(t@, i as int);
            lemma_invocation_keys_distinct();
            lemma_first_failure_next(t@, i as int, invocation_check());
            lemma_value_of_next(t@, i as int, "nl_session"@);
            lemma_value_of_next(t@, i as int, "assist_on_not_found"@);
            lemma_value_of_next(t@, i as int, "max_context_chars"@);
        }
        let k = &t[i].0;
        let v = &t[i].1;
        let step: Result<(), String> = if key_is(k, "nl_session") {
            match bool_value(v, "nl_session") {
                Ok(b) => {
                    nl_session = b;
                    Ok(())
                },
                Err(e) => Err(e),
            }
        } else if key_is(k, "assist_on_not_found") {
            match bool_value(v, "assist_on_not_found") {
                Ok(b) => {
                    assist_on_not_found = b;
                    Ok(())
                },
                Err(e) => Err(e),
            }
        } else if key_is(k, "max_context_chars") {
            match int_value(v, "max_context_chars", u64::MAX) {
                Ok(n) => {
                    max_context_chars = n;
                    Ok(())
                },
                Err(e) => Err(e),
            }
        } else {
            Err(unknown_key_message(k))
        };
        if let Err(e) = step {
            proof {
                lemma_first_failure_prefix(t@, invocation_check(), i + 1, e@);
            }
            return Err(e);
        }
        i += 1;
    }
    assert(t@.take(i as int) =~= t@);
    Ok(LlmInvocationConfig { nl_session, assist_on_not_found, max_context_chars })
}

/// Decodes `[llm]` (see [`decoded_llm`]).
fn decode_llm(t: &Vec<(String, TomlValue)>) -> (r: Result<LlmConfig, String>)
    ensures
        r matches Ok(c) ==> (decoded_llm(t@) matches Ok(w) && w == c@),
        r matches Err(e) ==> (decoded_llm(t@) matches Err(w) && w == e@),
{
    let mut enabled = false;
    let mut base_url = defaults::base_url();
    let mut model: Option<String> = None;
    let mut timeout_secs: u64 = 60;
    let mut allow_remote = false;
    let mut invocation = LlmInvocationConfig {
        nl_session: false,
        assist_on_not_found: false,
        max_context_chars: 8_000,
    };
    let mut i: usize = 0;
    while i < t.len()
        invariant
            i <= t@.len(),
            first_failure(t@.take(i as int), llm_check()) is None,
            enabled == bool_or(t@.take(i as int), "enabled"@, false),
            base_url@ == str_or(t@.take(i as int), "base_url"@, spec_base_url()),
            opt_view(model) == opt_str_of(t@.take(i as int), "model"@),
            timeout_secs == int_or(t@.take(i as int), "timeout_secs"@, 60),
            allow_remote == bool_or(t@.take(i as int), "allow_remote"@, false),
            invocation == invocation_view(table_of(t@.take(i as int), "invocation"@)),
        decreases t.len() - i,
    {
        proof {
            lemma_take_next(t@, i as int);
            lemma_llm_keys_distinct();
            lemma_first_failure_next(t@, i as int, llm_check());
            lemma_value_of_next(t@, i as int, "enabled"@);
            lemma_value_of_next(t@, i as int, "provider"@);
            lemma_value_of_next(t@, i as int, "base_url"@);
            lemma_value_of_next(t@, i as int, "model"@);
            lemma_value_of_next(t@, i as int, "timeout_secs"@);
            lemma_value_of_next(t@, i as int, "allow_remote"@);
            lemma_value_of_next(t@, i as int, "invocation"@);
        }
        let k = &t[i].0;
        let v = &t[i].1;
        let step: Result<(), String> = if key_is(k, "enabled") {
            match bool_value(v, "enabled") {
                Ok(b) => {
                    enabled = b;
                    Ok(())
                },
                Err(e) => Err(e),
            }
        } else if key_is(k, "provider") {
            match v {
                TomlValue::Str(s) => if key_is(s, "ollama") {
                    Ok(())
                } else {
                    Err(key_message("expected ollama for key", "provider"))
                },
                _ => Err(key_message("expected a string for key", "provider")),
            }
        } else if key_is(k, "base_url") {
            match str_value(v, "base_url") {
                Ok(s) => {
                    base_url = s;
                    Ok(())
                },
                Err(e) => Err(e),
            }
        } else if key_is(k, "model") {
            match str_value(v, "model") {
                Ok(s) => {
                    model = Some(s);
                    Ok(())
                },
                Err(e) => Err(e),
            }
        } else if key_is(k, "timeout_secs") {
            match int_value(v, "timeout_secs", u64::MAX) {
                Ok(n) => {
                    timeout_secs = n;
                    Ok(())
                },
                Err(e) => Err(e),
            }
        } else if key_is(k, "allow_remote") {
            match bool_value(v, "allow_remote") {
                Ok(b) => {
                    allow_remote = b;
                    Ok(())
                },
                Err(e) => Err(e),
            }
        } else if key_is(k, "invocation") {
            match table_value(v, "invocation") {
                Ok(e) => match decode_invocation(e) {
                    Ok(c) => {
                        invocation = c;
                        Ok(())
                    },
                    Err(m) => Err(m),
                },
                Err(m) => Err(m),
            }
        } else {
            Err(unknown_key_message(k))
        };
        if let Err(e) = step {
            proof {
                lemma_first_failure_prefix(t@, llm_check(), i + 1, e@);
            }
            return Err(e);
        }
        i += 1;
    }
    assert(t@.take(i as int) =~= t@);
    Ok(
        LlmConfig {
            enabled,
            provider: LlmProvider::Ollama,
            base_url,
            model,
            timeout_secs,
            allow_remote,
            invocation,
        },
    )
}

/// Decodes `[safety]` (see [`decoded_safety`]).
fn decode_safety(t: &Vec<(String, TomlValue)>) -> (r: Result<SafetyConfig, String>)
    ensures
        r matches Ok(c) ==> (decoded_safety(t@) matches Ok(w) && w == c@),
        r matches Err(e) ==> (decoded_safety(t@) matches Err(w) && w == e@),
{
    let mut deny_prefixes = defaults::deny_prefixes();
    let mut allow_prefixes: Vec<String> = Vec::new();
    let mut high_risk_patterns = defaults::high_risk_patterns();
    assert(string_views(allow_prefixes@) =~= seq![]);
    let mut i: usize = 0;
    while i < t.len()
        invariant
            i <= t@.len(),
            first_failure(t@.take(i as int), safety_check()) is None,
            string_views(deny_prefixes@) == str_list_or(
                t@.take(i as int),
                "deny_prefixes"@,
                spec_deny_prefixes(),
            ),
            string_views(allow_prefixes@) == str_list_or(t@.take(i as int), "allow_prefixes"@, seq![]),
            string_views(high_risk_patterns@) == str_list_or(
                t@.take(i as int),
                "high_risk_patterns"@,
                spec_high_risk_patterns(),
            ),
        decreases t.len() - i,
    {
        proof {
            lemma_take_next(t@, i as int);
            lemma_safety_keys_distinct();
            lemma_first_failure_next(t@, i as int, safety_check());
            lemma_value_of_next(t@, i as int, "deny_prefixes"@);
            lemma_value_of_next(t@, i as int, "allow_prefixes"@);
            lemma_value_of_next(t@, i as int, "high_risk_patterns"@);
        }
        let k = &t[i].0;
        let v = &t[i].1;
        let step: Result<(), String> = if key_is(k, "deny_prefixes") {
            match str_list_value(v, "deny_prefixes") {
                Ok(l) => {
                    deny_prefixes = l;
                    Ok(())
                },
                Err(e) => Err(e),
            }
        } else if key_is(k, "allow_prefixes") {
            match str_list_value(v, "allow_prefixes") {
                Ok(l) => {
                    allow_prefixes = l;
                    Ok(())
                },
                Err(e) => Err(e),
            }
        } else if key_is(k, "high_risk_patterns") {
            match str_list_value(v, "high_risk_patterns") {
                Ok(l) => {
                    high_risk_patterns = l;
                    Ok(())
                },
                Err(e) => Err(e),
            }
        } else {
            Err(unknown_key_message(k))
        };
        if let Err(e) = step {
            proof {
                lemma_first_failure_prefix(t@, safety_check(), i + 1, e@);
            }
            return Err(e);
        }
        i += 1;
    }
    assert(t@.take(i as int) =~= t@);
    Ok(SafetyConfig { deny_prefixes, allow_prefixes, high_risk_patterns })
}

/// Decodes `[audit]` (see [`decoded_audit`]).
fn decode_audit(t: &Vec<(String, TomlValue)>) -> (r: Result<AuditConfig, String>)
    ensures
        r matches Ok(c) ==> (decoded_audit(t@) matches Ok(w) && w == c@),
        r matches Err(e) ==> (decoded_audit(t@) matches Err(w) && w == e@),
{
    let mut enabled = true;
    let mut path: Option<String> = None;
    let mut i: usize = 0;
    while i < t.len()
        invariant
            i <= t@.len(),
            first_failure(t@.take(i as int), audit_check()) is None,
            enabled == bool_or(t@.take(i as int), "enabled"@, true),
            opt_view(path) == opt_str_of(t@.take(i as int), "path"@),
        decreases t.len() - i,
    {
        proof {
            lemma_take_next(t@, i as int);
            lemma_audit_keys_distinct();
            lemma_first_failure_next(t@, i as int, audit_check());
            lemma_value_of_next(t@, i as int, "enabled"@);
            lemma_value_of_next(t@, i as int, "path"@);
        }
        let k = &t[i].0;
        let v = &t[i].1;
        let step: Result<(), String> = if key_is(k, "enabled") {
            match bool_value(v, "enabled") {
                Ok(b) => {
                    enabled = b;
                    Ok(())
                },
                Err(e) => Err(e),
            }
        } else if key_is(k, "path") {
            match str_value(v, "path") {
                Ok(s) => {
                    path = Some(s);
                    Ok(())
                },
                Err(e) => Err(e),
            }
        } else {
            Err(unknown_key_message(k))
        };
        if let Err(e) = step {
            proof {
                lemma_first_failure_prefix(t@, audit_check(), i + 1, e@);
            }
            return Err(e);
        }
        i += 1;
    }
    assert(t@.take(i as int) =~= t@);
    Ok(AuditConfig { enabled, path })
}

/// Decodes one `[[hooks.pre_exec]]` table (see [`decoded_hook`]).
fn decode_hook(t: &Vec<(String, TomlValue)>) -> (r: Result<HookEntry, String>)
    ensures
        r matches Ok(h) ==> (decoded_hook(t@) matches Ok(w) && w == h@),
        r matches Err(e) ==> (decoded_hook(t@) matches Err(w) && w == e@),
{
    let mut command: Vec<String> = Vec::new();
    let mut has_command = false;
    let mut timeout_ms: u64 = 5_000;
    assert(string_views(command@) =~= seq![]);
    let mut i: usize = 0;
    while i < t.len()
        invariant
            i <= t@.len(),
            first_failure(t@.take(i as int), hook_check()) is None,
            string_views(command@) == str_list_or(t@.take(i as int), "command"@, seq![]),
            has_command == value_of(t@.take(i as int), "command"@) is Some,
            timeout_ms == int_or(t@.take(i as int), "timeout_ms"@, 5_000),
        decreases t.len() - i,
    {
        proof {
            lemma_take_next(t@, i as int);
            lemma_hook_keys_distinct();
            lemma_first_failure_next(t@, i as int, hook_check());
            lemma_value_of_next(t@, i as int, "command"@);
            lemma_value_of_next(t@, i as int, "timeout_ms"@);
        }
        let k = &t[i].0;
        let v = &t[i].1;
        let step: Result<(), String> = if key_is(k, "command") {
            match str_list_value(v, "command") {
                Ok(l) => {
                    command = l;
                    has_command = true;
                    Ok(())
                },
                Err(e) => Err(e),
            }
        } else if key_is(k, "timeout_ms") {
            match int_value(v, "timeout_ms", u64::MAX) {
                Ok(n) => {
                    timeout_ms = n;
                    Ok(())
                },
                Err(e) => Err(e),
            }
        } else {
            Err(unknown_key_message(k))
        };
        if let Err(e) = step {
            proof {
                lemma_first_failure_prefix(t@, hook_check(), i + 1, e@);
            }
            return Err(e);
        }
        i += 1;
    }
    assert(t@.take(i as int) =~= t@);
    if !has_command {
        return Err(key_message("missing key", "command"));
    }
    Ok(HookEntry { command, timeout_ms })
}

/// An array whose prefix holds an item that is not a valid hook table fails
/// with that item's complaint.
proof fn lemma_hook_items_prefix(items: Seq<TomlValue>, n: int, m: Seq<char>)
    requires
        0 <= n <= items.len(),
        hook_items_error(items.take(n)) == Some(m),
    ensures
        hook_items_error(items) == Some(m),
    decreases items.len() - n,
{
    if n < items.len() {
        assert(items.take(n + 1).drop_last() =~= items.take(n));
        lemma_hook_items_prefix(items, n + 1, m);
    } else {
        assert(items.take(n) =~= items);
    }
}

/// Decodes the `pre_exec` array (see [`decoded_hook_items`]).
fn decode_hook_items(items: &Vec<TomlValue>) -> (r: Result<Vec<HookEntry>, String>)
    ensures
        r matches Ok(v) ==> (decoded_hook_items(items@) matches Ok(w) && w == hook_views(v@)),
        r matches Err(e) ==> (decoded_hook_items(items@) matches Err(w) && w == e@),
{
    let mut out: Vec<HookEntry> = Vec::new();
    let mut i: usize = 0;
    assert(hook_items_view(items@.take(0)) =~= hook_views(out@));
    while i < items.len()
        invariant
            i <= items@.len(),
            hook_items_error(items@.take(i as int)) is None,
            hook_views(out@) == hook_items_view(items@.take(i as int)),
        decreases items.len() - i,
    {
        proof {
            lemma_take_next(items@, i as int);
        }
        let h = match &items[i] {
            TomlValue::Table(e) => decode_hook(e),
            _ => Err(key_message("expected a table for key", "pre_exec")),
        };
        match h {
            Ok(h) => {
                let ghost before = out@;
                out.push(h);
                assert(hook_views(out@) =~= hook_views(before).push(h@));
                assert(hook_items_view(items@.take(i + 1)) =~= hook_items_view(
                    items@.take(i as int),
                ).push(hook_item_view(items@[i as int])));
            },
            Err(e) => {
                proof {
                    lemma_hook_items_prefix(items@, i + 1, e@);
                }
                return Err(e);
            },
        }
        i += 1;
    }
    assert(items@.take(i as int) =~= items@);
    Ok(out)
}

/// Decodes `[hooks]` (see [`decoded_hooks`]).
fn decode_hooks(t: &Vec<(String, TomlValue)>) -> (r: Result<HooksConfig, String>)
    ensures
        r matches Ok(c) ==> (decoded_hooks(t@) matches Ok(w) && w == hook_views(c.pre_exec@)),
        r matches Err(e) ==> (decoded_hooks(t@) matches Err(w) && w == e@),
{
    let mut pre_exec: Vec<HookEntry> = Vec::new();
    assert(hook_views(pre_exec@) =~= seq![]);
    let mut i: usize = 0;
    while i < t.len()
        invariant
            i <= t@.len(),
            first_failure(t@.take(i as int), hooks_check()) is None,
            hook_views(pre_exec@) == hooks_view(t@.take(i as int)),
        decreases t.len() - i,
    {
        proof {
            lemma_take_next(t@, i as int);
            lemma_first_failure_next(t@, i as int, hooks_check());
            lemma_value_of_next(t@, i as int, "pre_exec"@);
        }
        let k = &t[i].0;
        let v = &t[i].1;
        let step: Result<(), String> = if key_is(k, "pre_exec") {
            match v {
                TomlValue::Array(a) => match decode_hook_items(a) {
                    Ok(h) => {
                        pre_exec = h;
                        Ok(())
                    },
                    Err(e) => Err(e),
                },
                _ => Err(key_message("expected an array of tables for key", "pre_exec")),
            }
        } else {
            Err(unknown_key_message(k))
        };
        if let Err(e) = step {
            proof {
                lemma_first_failure_prefix(t@, hooks_check(), i + 1, e@);
            }
            return Err(e);
        }
        i += 1;
    }
    assert(t@.take(i as int) =~= t@);
    Ok(HooksConfig { pre_exec })
}

/// Decodes `[limits]` (see [`decoded_limits`]).
fn decode_limits(t: &Vec<(String, TomlValue)>) -> (r: Result<LimitsConfig, String>)
    ensures
        r matches Ok(c) ==> (decoded_limits(t@) matches Ok(w) && w == c),
        r matches Err(e) ==> (decoded_limits(t@) matches Err(w) && w == e@),
{
    let mut out: u64 = 1_048_576;
    let mut llm: u64 = 256_000;
    let mut i: usize = 0;
    while i < t.len()
        invariant
            i <= t@.len(),
            first_failure(t@.take(i as int), limits_check()) is None,
            out == int_or(t@.take(i as int), "max_stdout_capture_bytes"@, 1_048_576),
            llm == int_or(t@.take(i as int), "max_llm_payload_bytes"@, 256_000),
        decreases t.len() - i,
    {
        proof {
            lemma_take_next(t@, i as int);
            lemma_limits_keys_distinct();
            lemma_first_failure_next(t@, i as int, limits_check());
            lemma_value_of_next(t@, i as int, "max_stdout_capture_bytes"@);
            lemma_value_of_next(t@, i as int, "max_llm_payload_bytes"@);
        }
        let k = &t[i].0;
        let v = &t[i].1;
        let step: Result<(), String> = if key_is(k, "max_stdout_capture_bytes") {
            match int_value(v, "max_stdout_capture_bytes", u64::MAX) {
                Ok(n) => {
                    out = n;
                    Ok(())
                },
                Err(e) => Err(e),
            }
        } else if key_is(k, "max_llm_payload_bytes") {
            match int_value(v, "max_llm_payload_bytes", u64::MAX) {
                Ok(n) => {
                    llm = n;
                    Ok(())
                },
                Err(e) => Err(e),
            }
        } else {
            Err(unknown_key_message(k))
        };
        if let Err(e) = step {
            proof {
                lemma_first_failure_prefix(t@, limits_check(), i + 1, e@);
            }
            return Err(e);
        }
        i += 1;
    }
    assert(t@.take(i as int) =~= t@);
    Ok(LimitsConfig { max_stdout_capture_bytes: out, max_llm_payload_bytes: llm })
}

/// Decodes the root table of a parsed document into a configuration.
///
/// The entries are read in document order; the first whose key the schema
/// does not know, or whose value has the wrong type or range, rejects the
/// document with a message naming the key (see [`decoded_config`]).
/// Otherwise the result is the configuration that the document describes,
/// defaults filled in.
pub fn decode_config(root: &Vec<(String, TomlValue)>) -> (r: Result<Config, String>)
    ensures
        r matches Ok(c) ==> (decoded_config(root@) matches Ok(w) && w == c@),
        r matches Err(e) ==> (decoded_config(root@) matches Err(w) && w == e@),
{
    let empty: Vec<(String, TomlValue)> = Vec::new();
    assert(empty@ =~= Seq::<(String, TomlValue)>::empty());
    let mut schema_version: u32 = 1;
    let mut safety_mode = SafetyMode::Balanced;
    let mut llm = match decode_llm(&empty) {
        Ok(c) => c,
        Err(e) => return Err(e),
    };
    let mut safety = match decode_safety(&empty) {
        Ok(c) => c,
        Err(e) => return Err(e),
    };
    let mut audit = match decode_audit(&empty) {
        Ok(c) => c,
        Err(e) => return Err(e),
    };
    let mut hooks = match decode_hooks(&empty) {
        Ok(c) => c,
        Err(e) => return Err(e),
    };
    let mut limits = match decode_limits(&empty) {
        Ok(c) => c,
        Err(e) => return Err(e),
    };
    let mut i: usize = 0;
    while i < root.len()
        invariant
            i <= root@.len(),
            first_failure(root@.take(i as int), root_check()) is None,
            schema_version == int_or(root@.take(i as int), "schema_version"@, 1),
            safety_mode == mode_of(root@.take(i as int)),
            llm@ == llm_view(table_of(root@.take(i as int), "llm"@)),
            safety@ == safety_view(table_of(root@.take(i as int), "safety"@)),
            audit@ == audit_view(table_of(root@.take(i as int), "audit"@)),
            hook_views(hooks.pre_exec@) == hooks_view(table_of(root@.take(i as int), "hooks"@)),
            limits == limits_view(table_of(root@.take(i as int), "limits"@)),
        decreases root.len() - i,
    {
        proof {
            lemma_take_next(root@, i as int);
            lemma_root_keys_distinct();
            lemma_mode_names_distinct();
            lemma_first_failure_next(root@, i as int, root_check());
            lemma_value_of_next(root@, i as int, "schema_version"@);
            lemma_value_of_next(root@, i as int, "safety_mode"@);
            lemma_value_of_next(root@, i as int, "llm"@);
            lemma_value_of_next(root@, i as int, "safety"@);
            lemma_value_of_next(root@, i as int, "audit"@);
            lemma_value_of_next(root@, i as int, "hooks"@);
            lemma_value_of_next(root@, i as int, "limits"@);
        }
        let k = &root[i].0;
        let v = &root[i].1;
        let step: Result<(), String> = if key_is(k, "schema_version") {
            match int_value(v, "schema_version", 0xffff_ffff) {
                Ok(n) => {
                    schema_version = n as u32;
                    Ok(())
                },
                Err(e) => Err(e),
            }
        } else if key_is(k, "safety_mode") {
            match v {
                TomlValue::Str(s) => if key_is(s, "strict") {
                    safety_mode = SafetyMode::Strict;
                    Ok(())
                } else if key_is(s, "balanced") {
                    safety_mode = SafetyMode::Balanced;
                    Ok(())
                } else if key_is(s, "loose") {
                    safety_mode = SafetyMode::Loose;
                    Ok(())
                } else {
                    Err(key_message("expected strict, balanced or loose for key", "safety_mode"))
                },
                _ => Err(key_message("expected a string for key", "safety_mode")),
            }
        } else if key_is(k, "llm") {
            match table_value(v, "llm") {
                Ok(e) => match decode_llm(e) {
                    Ok(c) => {
                        llm = c;
                        Ok(())
                    },
                    Err(m) => Err(m),
                },
                Err(m) => Err(m),
            }
        } else if key_is(k, "safety") {
            match table_value(v, "safety") {
                Ok(e) => match decode_safety(e) {
                    Ok(c) => {
                        safety = c;
                        Ok(())
                    },
                    Err(m) => Err(m),
                },
                Err(m) => Err(m),
            }
        } else if key_is(k, "audit") {
            match table_value(v, "audit") {
                Ok(e) => match decode_audit(e) {
                    Ok(c) => {
                        audit = c;
                        Ok(())
                    },
                    Err(m) => Err(m),
                },
                Err(m) => Err(m),
            }
        } else if key_is(k, "hooks") {
            match table_value(v, "hooks") {
                Ok(e) => match decode_hooks(e) {
                    Ok(c) => {
                        hooks = c;
                        Ok(())
                    },
                    Err(m) => Err(m),
                },
                Err(m) => Err(m),
            }
        } else if key_is(k, "limits") {
            match table_value(v, "limits") {
                Ok(e) => match decode_limits(e) {
                    Ok(c) => {
                        limits = c;
                        Ok(())
                    },
                    Err(m) => Err(m),
                },
                Err(m) => Err(m),
            }
        } else {
            Err(unknown_key_message(k))
        };
        if let Err(e) = step {
            proof {
                lemma_first_failure_prefix(root@, root_check(), i + 1, e@);
            }
            return Err(e);
        }
        i += 1;
    }
    assert(root@.take(i as int) =~= root@);
    Ok(Config { schema_version, safety_mode, llm, safety, audit, hooks, limits })
}

/// An entry found by [`value_of`] is one of the table's entries.
pub proof fn lemma_value_of_found(t: Seq<(String, TomlValue)>, key: Seq<char>)
    requires
        value_of(t, key) is Some,
    ensures
        exists|j: int| 0 <= j < t.len() && #[trigger] t[j].0@ == key && t[j].1 == value_of(t, key)->0,
    decreases t.len(),
{
    if t.last().0@ != key {
        lemma_value_of_found(t.drop_last(), key);
        let j = choose|j: int|
            0 <= j < t.drop_last().len() && #[trigger] t.drop_last()[j].0@ == key && t.drop_last()[j].1
                == value_of(t.drop_last(), key)->0;
        assert(t[j] == t.drop_last()[j]);
    } else {
        assert(t[t.len() - 1].0@ == key);
    }
}

/// An empty document decodes to the built-in default configuration, which
/// is what `Config::default()` builds.
pub proof fn law_empty_document_is_default(c: Config)
    requires
        c.is_default(),
    ensures
        c@ == default_view(),
        (decoded_config(Seq::empty()) matches Ok(w) && w == default_view()),
{
    assert(string_views(c.safety.allow_prefixes@) =~= seq![]);
    assert(hook_views(c.hooks.pre_exec@) =~= seq![]);
    assert(c.llm.invocation == default_view().llm.invocation);
    assert(c.limits == default_view().limits);
    assert(config_view(Seq::empty()) == default_view());
}

/// A document whose root holds a key the schema does not know is rejected
/// as a whole; when every entry before it is accepted, the message names
/// that key.
pub proof fn law_unknown_key_rejected(root: Seq<(String, TomlValue)>, i: int)
    requires
        0 <= i < root.len(),
        !root_keys().contains(root[i].0@),
    ensures
        decoded_config(root) is Err,
        (forall|j: int| 0 <= j < i ==> (#[trigger] root_entry(root[j].0@, root[j].1)) is None)
            ==> (decoded_config(root) matches Err(m) && m == unknown_msg(root[i].0@)),
{
    let k = root[i].0@;
    assert(root_keys()[0] == "schema_version"@ && root_keys()[1] == "safety_mode"@
        && root_keys()[2] == "llm"@ && root_keys()[3] == "safety"@ && root_keys()[4] == "audit"@
        && root_keys()[5] == "hooks"@ && root_keys()[6] == "limits"@);
    assert(root_entry(k, root[i].1) == Some(unknown_msg(k)));
    lemma_first_failure_at(root, root_check(), i);
    if forall|j: int| 0 <= j < i ==> (#[trigger] root_entry(root[j].0@, root[j].1)) is None {
        assert forall|j: int| 0 <= j < i implies (#[trigger] root_check()(root[j].0@, root[j].1)) is None by {
            assert(root_entry(root[j].0@, root[j].1) is None);
        }
    }
}

/// Decoding is all or nothing: whenever a document decodes, every section
/// of it decodes on its own, and the result holds exactly the decoded
/// sections.
pub proof fn law_sections_decode(root: Seq<(String, TomlValue)>)
    requires
        decoded_config(root) is Ok,
    ensures
        (decoded_llm(table_of(root, "llm"@)) matches Ok(w) && w == decoded_config(root)->Ok_0.llm),
        (decoded_safety(table_of(root, "safety"@)) matches Ok(w) && w == decoded_config(root)->Ok_0.safety),
        (decoded_audit(table_of(root, "audit"@)) matches Ok(w) && w == decoded_config(root)->Ok_0.audit),
        (decoded_hooks(table_of(root, "hooks"@)) matches Ok(w) && w == decoded_config(root)->Ok_0.hooks),
        (decoded_limits(table_of(root, "limits"@)) matches Ok(w) && w == decoded_config(root)->Ok_0.limits),
        decoded_config(root)->Ok_0.safety_mode == mode_of(root),
{
    lemma_first_failure_clean(root, root_check());
    lemma_root_keys_distinct();
    let names = seq!["llm"@, "safety"@, "audit"@, "hooks"@, "limits"@];
    assert forall|n: int| 0 <= n < 5 implies (value_of(root, #[trigger] names[n]) is Some ==> root_check()(
        names[n],
        value_of(root, names[n])->0,
    ) is None) by {
        if value_of(root, names[n]) is Some {
            lemma_value_of_found(root, names[n]);
            let j = choose|j: int|
                0 <= j < root.len() && #[trigger] root[j].0@ == names[n] && root[j].1 == value_of(
                    root,
                    names[n],
                )->0;
            assert(root_check()(root[j].0@, root[j].1) is None);
        }
    }
    assert(names[0] == "llm"@ && names[1] == "safety"@ && names[2] == "audit"@ && names[3] == "hooks"@
        && names[4] == "limits"@);
}

/// The keys a root section takes; empty for a name that is no section.
pub open spec fn section_keys(section: Seq<char>) -> Seq<Seq<char>> {
    if section == "llm"@ {
        llm_keys()
    } else if section == "safety"@ {
        safety_keys()
    } else if section == "audit"@ {
        audit_keys()
    } else if section == "hooks"@ {
        hooks_keys()
    } else if section == "limits"@ {
        limits_keys()
    } else {
        seq![]
    }
}

/// A section table holding a key that the section does not take rejects
/// the whole document, in every section.
pub proof fn law_unknown_section_key_rejected(root: Seq<(String, TomlValue)>, section: Seq<char>, i: int)
    requires
        value_of(root, section) matches Some(TomlValue::Table(e)) && 0 <= i < e@.len()
            && !section_keys(section).contains(e@[i].0@),
    ensures
        decoded_config(root) is Err,
{
    let e = table_of(root, section);
    let k = e[i].0@;
    lemma_value_of_found(root, section);
    let j = choose|j: int|
        0 <= j < root.len() && #[trigger] root[j].0@ == section && root[j].1 == value_of(root, section)->0;
    lemma_root_keys_distinct();
    if section == "llm"@ {
        assert(llm_keys()[0] == "enabled"@ && llm_keys()[1] == "provider"@ && llm_keys()[2] == "base_url"@
            && llm_keys()[3] == "model"@ && llm_keys()[4] == "timeout_secs"@ && llm_keys()[5]
            == "allow_remote"@ && llm_keys()[6] == "invocation"@);
        assert(llm_check()(e[i].0@, e[i].1) is Some);
        lemma_first_failure_at(e, llm_check(), i);
    } else if section == "safety"@ {
        assert(safety_keys()[0] == "deny_prefixes"@ && safety_keys()[1] == "allow_prefixes"@
            && safety_keys()[2] == "high_risk_patterns"@);
        assert(safety_check()(e[i].0@, e[i].1) is Some);
        lemma_first_failure_at(e, safety_check(), i);
    } else if section == "audit"@ {
        assert(audit_keys()[0] == "enabled"@ && audit_keys()[1] == "path"@);
        assert(audit_check()(e[i].0@, e[i].1) is Some);
        lemma_first_failure_at(e, audit_check(), i);
    } else if section == "hooks"@ {
        assert(hooks_keys()[0] == "pre_exec"@);
        assert(hooks_check()(e[i].0@, e[i].1) is Some);
        lemma_first_failure_at(e, hooks_check(), i);
    } else if section == "limits"@ {
        assert(limits_keys()[0] == "max_stdout_capture_bytes"@ && limits_keys()[1]
            == "max_llm_payload_bytes"@);
        assert(limits_check()(e[i].0@, e[i].1) is Some);
        lemma_first_failure_at(e, limits_check(), i);
    }
    assert(root_check()(root[j].0@, root[j].1) is Some);
    lemma_first_failure_at(root, root_check(), j);
}

/// An array whose items each pass has no failing item, and the other way round.
proof fn lemma_hook_items_clean(items: Seq<TomlValue>)
    ensures
        hook_items_error(items) is None <==> forall|i: int|
            0 <= i < items.len() ==> (#[trigger] hook_item_error(items[i])) is None,
    decreases items.len(),
{
    if items.len() > 0 {
        let u = items.drop_last();
        lemma_hook_items_clean(u);
        assert forall|i: int| 0 <= i < u.len() implies u[i] == items[i] by {}
        if hook_items_error(items) is None {
            assert forall|i: int| 0 <= i < items.len() implies (#[trigger] hook_item_error(items[i])) is None by {
                if i < u.len() {
                    assert(u[i] == items[i]);
                }
            }
        }
        if forall|i: int| 0 <= i < items.len() ==> (#[trigger] hook_item_error(items[i])) is None {
            assert forall|i: int| 0 <= i < u.len() implies (#[trigger] hook_item_error(u[i])) is None by {
                assert(u[i] == items[i]);
            }
            assert(hook_item_error(items[items.len() - 1]) is None);
        }
    }
}

/// The `pre_exec` array decodes to exactly one hook per item, in document
/// order: every item is a hook table, and hook `i` is what table `i`
/// decodes to.
pub proof fn law_one_hook_per_table(items: Seq<TomlValue>)
    requires
        decoded_hook_items(items) is Ok,
    ensures
        decoded_hook_items(items)->Ok_0.len() == items.len(),
        forall|i: int|
            0 <= i < items.len() ==> (#[trigger] items[i] matches TomlValue::Table(e) && (decoded_hook(
                e@,
            ) matches Ok(h) && h == decoded_hook_items(items)->Ok_0[i])),
{
    lemma_hook_items_clean(items);
    assert forall|i: int| 0 <= i < items.len() implies (#[trigger] items[i] matches TomlValue::Table(e)
        && (decoded_hook(e@) matches Ok(h) && h == decoded_hook_items(items)->Ok_0[i])) by {
        assert(hook_item_error(items[i]) is None);
    }
}

/// A document that decodes runs one hook per `[[hooks.pre_exec]]` table,
/// in document order.
pub proof fn law_config_hook_per_table(root: Seq<(String, TomlValue)>)
    requires
        decoded_config(root) is Ok,
        value_of(table_of(root, "hooks"@), "pre_exec"@) is Some,
    ensures
        value_of(table_of(root, "hooks"@), "pre_exec"@) matches Some(TomlValue::Array(a)) && (
        decoded_hook_items(a@) matches Ok(hs) && hs == decoded_config(root)->Ok_0.hooks),
{
    law_sections_decode(root);
    let t = table_of(root, "hooks"@);
    lemma_first_failure_clean(t, hooks_check());
    lemma_value_of_found(t, "pre_exec"@);
    let j = choose|j: int|
        0 <= j < t.len() && #[trigger] t[j].0@ == "pre_exec"@ && t[j].1 == value_of(t, "pre_exec"@)->0;
    assert(hooks_check()(t[j].0@, t[j].1) is None);
}

} // verus!
